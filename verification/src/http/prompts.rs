//! Prompt templates: text with `{{placeholder}}` slots, the values that fill
//! them, and who may see a prompt.

use vstd::prelude::*;
use vstd::string::*;

use crate::lists::{selects_just, selects_last};
use crate::error::{forbidden, refusal, validation, AppError, Refusal};
use crate::json::{member, members, Member, Supplied};
use crate::order::{by_time, newest_first, Dated};
use crate::principal::{is_lead, same_id, AuthContext, Id, PlatformRole};
use crate::text::{
    chars_of, find_at, find_at_after_skip, find_at_is_first, find_from, listed, occurs_at, same,
    text_between, texts, trim, trimmed,
};
use crate::trail::{entry_by, record_by, AuditEvent};

verus! {

/// A stretch of a template: text that stands for itself, or what is written
/// between a `{{` and the next `}}`.
#[verifier::ext_equal]
pub enum Piece {
    Text(Seq<char>),
    Slot(Seq<char>),
}

pub open spec fn opening() -> Seq<char> {
    seq!['{', '{']
}

pub open spec fn closing() -> Seq<char> {
    seq!['}', '}']
}

/// A template read from the left. A `{{` that is never closed, and all that
/// follows it, is text.
pub open spec fn pieces(s: Seq<char>) -> Seq<Piece>
    decreases s.len(),
    via pieces_shrink
{
    match find_at(s, opening(), 0) {
        None => seq![Piece::Text(s)],
        Some(open) => match find_at(s, closing(), open + 2) {
            None => seq![Piece::Text(s)],
            Some(close) => seq![
                Piece::Text(s.take(open)),
                Piece::Slot(s.subrange(open + 2, close)),
            ] + pieces(s.skip(close + 2)),
        },
    }
}

#[via_fn]
proof fn pieces_shrink(s: Seq<char>) {
    find_at_is_first(s, opening(), 0);
    match find_at(s, opening(), 0) {
        Some(open) => {
            find_at_is_first(s, closing(), open + 2);
        },
        None => {},
    }
}

/// The names in the slots, trimmed; a slot with nothing in it has none.
pub open spec fn slot_names(p: Seq<Piece>) -> Seq<Seq<char>>
    decreases p.len(),
{
    if p.len() == 0 {
        Seq::empty()
    } else {
        let before = slot_names(p.drop_last());
        match p.last() {
            Piece::Text(_) => before,
            Piece::Slot(raw) => if trimmed(raw).len() == 0 {
                before
            } else {
                before.push(trimmed(raw))
            },
        }
    }
}

/// The members of a list in the order in which each first occurs.
pub open spec fn distinct(s: Seq<Seq<char>>) -> Seq<Seq<char>>
    decreases s.len(),
{
    if s.len() == 0 {
        Seq::empty()
    } else {
        let before = distinct(s.drop_last());
        if before.contains(s.last()) {
            before
        } else {
            before.push(s.last())
        }
    }
}

/// The distinct placeholder names of a template, in first-seen order.
pub open spec fn placeholder_names(template: Seq<char>) -> Seq<Seq<char>> {
    distinct(slot_names(pieces(template)))
}

/// The text that a supplied value stands for: a null stands for none.
pub open spec fn member_text(m: Member) -> Option<Seq<char>> {
    match m {
        Member::Null => None,
        Member::Text(s) => Some(s),
        Member::Other(s) => Some(s),
    }
}

/// The text supplied under `name`.
pub open spec fn value_of(values: Map<Seq<char>, Member>, name: Seq<char>) -> Option<Seq<char>> {
    if values.dom().contains(name) {
        member_text(values[name])
    } else {
        None
    }
}

/// A piece with the values filled in. A slot without a value stays as written.
pub open spec fn filled_piece(p: Piece, values: Map<Seq<char>, Member>) -> Seq<char> {
    match p {
        Piece::Text(s) => s,
        Piece::Slot(raw) => match value_of(values, trimmed(raw)) {
            Some(v) => v,
            None => opening() + raw + closing(),
        },
    }
}

/// The pieces with the values filled in, one after the other.
pub open spec fn filled_pieces(p: Seq<Piece>, values: Map<Seq<char>, Member>) -> Seq<char>
    decreases p.len(),
{
    if p.len() == 0 {
        Seq::empty()
    } else {
        filled_pieces(p.drop_last(), values) + filled_piece(p.last(), values)
    }
}

/// A template with the values filled in.
pub open spec fn rendered(template: Seq<char>, values: Map<Seq<char>, Member>) -> Seq<char> {
    filled_pieces(pieces(template), values)
}

proof fn slot_names_step(a: Seq<Piece>, p: Piece)
    ensures
        slot_names(a.push(p)) == (match p {
            Piece::Text(_) => slot_names(a),
            Piece::Slot(raw) => if trimmed(raw).len() == 0 {
                slot_names(a)
            } else {
                slot_names(a).push(trimmed(raw))
            },
        }),
{
    assert(a.push(p).drop_last() == a);
}

proof fn filled_step(a: Seq<Piece>, p: Piece, values: Map<Seq<char>, Member>)
    ensures
        filled_pieces(a.push(p), values) == filled_pieces(a, values) + filled_piece(p, values),
{
    assert(a.push(p).drop_last() == a);
}

/// The distinct names of a template are its slots' names, each once.
pub proof fn distinct_names_each_once(s: Seq<Seq<char>>)
    ensures
        distinct(s).no_duplicates(),
        forall|x: Seq<char>| distinct(s).contains(x) <==> s.contains(x),
    decreases s.len(),
{
    if s.len() > 0 {
        let before = distinct(s.drop_last());
        distinct_names_each_once(s.drop_last());
        assert forall|x: Seq<char>| distinct(s).contains(x) <==> s.contains(x) by {
            assert(s == s.drop_last().push(s.last()));
            if s.contains(x) && x != s.last() {
                let i = choose|i: int| 0 <= i < s.len() && s[i] == x;
                assert(s.drop_last()[i] == x);
                assert(s.drop_last().contains(x));
                let k = choose|k: int| 0 <= k < before.len() && before[k] == x;
                assert(distinct(s)[k] == x);
            }
            if x == s.last() {
                assert(s[s.len() - 1] == x);
                if !before.contains(x) {
                    assert(distinct(s)[before.len() as int] == x);
                }
            }
            if distinct(s).contains(x) && x != s.last() {
                let k = choose|k: int| 0 <= k < distinct(s).len() && distinct(s)[k] == x;
                assert(before[k] == x);
                assert(s.drop_last().contains(x));
                let i = choose|i: int| 0 <= i < s.drop_last().len() && s.drop_last()[i] == x;
                assert(s[i] == x);
            }
        }
    }
}

/// One step to the right in a template: the slot that comes next after
/// position `at`, and the pieces that follow it.
proof fn pieces_from(s: Seq<char>, at: int)
    requires
        0 <= at <= s.len(),
    ensures
        match find_at(s, opening(), at) {
            None => pieces(s.skip(at)) == seq![Piece::Text(s.skip(at))],
            Some(open) => match find_at(s, closing(), open + 2) {
                None => pieces(s.skip(at)) == seq![Piece::Text(s.skip(at))],
                Some(close) => {
                    &&& at <= open
                    &&& open + 2 <= close
                    &&& close + 2 <= s.len()
                    &&& pieces(s.skip(at)) == seq![
                        Piece::Text(s.subrange(at, open)),
                        Piece::Slot(s.subrange(open + 2, close)),
                    ] + pieces(s.skip(close + 2))
                },
            },
        },
{
    let t = s.skip(at);
    find_at_is_first(s, opening(), at);
    find_at_after_skip(s, opening(), at, 0);
    match find_at(s, opening(), at) {
        None => {},
        Some(open) => {
            find_at_is_first(s, closing(), open + 2);
            find_at_after_skip(s, closing(), at, open - at + 2);
            match find_at(s, closing(), open + 2) {
                None => {},
                Some(close) => {
                    assert(t.take(open - at) == s.subrange(at, open));
                    assert(t.subrange(open - at + 2, close - at) == s.subrange(open + 2, close));
                    assert(t.skip(close - at + 2) == s.skip(close + 2));
                },
            }
        },
    }
}

/// Extracts the distinct `{{placeholder}}` names from a template, in first-seen
/// order. White space inside the braces is trimmed; unclosed braces are ignored.
pub fn placeholders(template: &str) -> (r: Vec<String>)
    ensures
        texts(r@) == placeholder_names(template@),
{
    let v = chars_of(template);
    let n: usize = v.len();
    let open_mark: Vec<char> = vec!['{', '{'];
    let close_mark: Vec<char> = vec!['}', '}'];
    assert(open_mark@ == opening());
    assert(close_mark@ == closing());
    let mut out: Vec<String> = Vec::new();
    let mut at: usize = 0;
    let ghost mut seen: Seq<Piece> = Seq::empty();
    assert(v@.skip(0) == v@);
    assert(seen + pieces(v@.skip(0)) == pieces(v@));
    loop
        invariant
            at <= n,
            n == v@.len(),
            v@ == template@,
            open_mark@ == opening(),
            close_mark@ == closing(),
            seen + pieces(v@.skip(at as int)) == pieces(v@),
            texts(out@) == distinct(slot_names(seen)),
        decreases n - at,
    {
        proof {
            pieces_from(v@, at as int);
        }
        let open: usize = match find_from(&v, &open_mark, at) {
            Some(open) => open,
            None => {
                proof {
                    assert(pieces(v@) == seen.push(Piece::Text(v@.skip(at as int))));
                    slot_names_step(seen, Piece::Text(v@.skip(at as int)));
                }
                return out;
            },
        };
        proof {
            find_at_is_first(v@, opening(), at as int);
        }
        let close: usize = match find_from(&v, &close_mark, open + 2) {
            Some(close) => close,
            None => {
                proof {
                    assert(pieces(v@) == seen.push(Piece::Text(v@.skip(at as int))));
                    slot_names_step(seen, Piece::Text(v@.skip(at as int)));
                }
                return out;
            },
        };
        let raw = text_between(&v, open + 2, close);
        let name = trim(raw.as_str());
        let ghost before = seen.push(Piece::Text(v@.subrange(at as int, open as int)));
        let ghost after = before.push(Piece::Slot(raw@));
        proof {
            slot_names_step(seen, Piece::Text(v@.subrange(at as int, open as int)));
            slot_names_step(before, Piece::Slot(raw@));
            assert(after + pieces(v@.skip(close as int + 2)) == seen + pieces(v@.skip(at as int)));
            if name@.len() > 0 {
                assert(slot_names(after).drop_last() == slot_names(seen));
            }
        }
        if !name.as_str().is_empty() && !listed(&out, name.as_str()) {
            let ghost had = out@;
            out.push(name);
            assert(texts(out@) == texts(had).push(name@));
        }
        proof {
            seen = after;
        }
        at = close + 2;
    }
}

/// The text that a supplied value stands for.
fn value_as_str(v: Supplied) -> (r: Option<String>)
    ensures
        match r {
            Some(s) => member_text(v@) == Some(s@),
            None => member_text(v@) is None,
        },
{
    match v {
        Supplied::Text(s) => Some(s),
        Supplied::Null => None,
        Supplied::Other(s) => Some(s),
    }
}

/// Substitutes `{{name}}` occurrences with the supplied values. A placeholder
/// without a value is left as it is written, so a partial render is visible.
pub fn render(template: &str, values: &serde_json::Map<String, serde_json::Value>) -> (r: String)
    ensures
        r@ == rendered(template@, members(*values)),
{
    let v = chars_of(template);
    let n: usize = v.len();
    let ghost vals = members(*values);
    let open_mark: Vec<char> = vec!['{', '{'];
    let close_mark: Vec<char> = vec!['}', '}'];
    assert(open_mark@ == opening());
    assert(close_mark@ == closing());
    let mut out = String::new();
    let mut at: usize = 0;
    let ghost mut seen: Seq<Piece> = Seq::empty();
    assert(v@.skip(0) == v@);
    assert(seen + pieces(v@.skip(0)) == pieces(v@));
    loop
        invariant
            at <= n,
            n == v@.len(),
            v@ == template@,
            vals == members(*values),
            open_mark@ == opening(),
            close_mark@ == closing(),
            seen + pieces(v@.skip(at as int)) == pieces(v@),
            out@ == filled_pieces(seen, vals),
        decreases n - at,
    {
        proof {
            pieces_from(v@, at as int);
        }
        let open: usize = match find_from(&v, &open_mark, at) {
            Some(open) => open,
            None => {
                let rest = text_between(&v, at, n);
                proof {
                    assert(rest@ == v@.skip(at as int));
                    assert(pieces(v@) == seen.push(Piece::Text(v@.skip(at as int))));
                    filled_step(seen, Piece::Text(v@.skip(at as int)), vals);
                }
                out.append(rest.as_str());
                return out;
            },
        };
        proof {
            find_at_is_first(v@, opening(), at as int);
        }
        let close: usize = match find_from(&v, &close_mark, open + 2) {
            Some(close) => close,
            None => {
                let rest = text_between(&v, at, n);
                proof {
                    assert(rest@ == v@.skip(at as int));
                    assert(pieces(v@) == seen.push(Piece::Text(v@.skip(at as int))));
                    filled_step(seen, Piece::Text(v@.skip(at as int)), vals);
                }
                out.append(rest.as_str());
                return out;
            },
        };
        let literal = text_between(&v, at, open);
        out.append(literal.as_str());
        let raw = text_between(&v, open + 2, close);
        let name = trim(raw.as_str());
        let ghost before = seen.push(Piece::Text(literal@));
        let ghost after = before.push(Piece::Slot(raw@));
        proof {
            filled_step(seen, Piece::Text(literal@), vals);
            filled_step(before, Piece::Slot(raw@), vals);
            assert(after + pieces(v@.skip(close as int + 2)) == seen + pieces(v@.skip(at as int)));
        }
        let found = match member(values, name.as_str()) {
            Some(x) => value_as_str(x),
            None => None,
        };
        match found {
            Some(text) => {
                out.append(text.as_str());
            },
            None => {
                proof {
                    reveal_strlit("{{");
                    reveal_strlit("}}");
                    assert("{{"@ == opening());
                    assert("}}"@ == closing());
                }
                out.append("{{");
                out.append(raw.as_str());
                out.append("}}");
                assert(out@ == filled_pieces(before, vals) + (opening() + raw@ + closing()));
            },
        }
        proof {
            seen = after;
        }
        at = close + 2;
    }
}

proof fn filled_concat(a: Seq<Piece>, b: Seq<Piece>, values: Map<Seq<char>, Member>)
    ensures
        filled_pieces(a + b, values) == filled_pieces(a, values) + filled_pieces(b, values),
    decreases b.len(),
{
    if b.len() == 0 {
        assert(a + b == a);
    } else {
        filled_concat(a, b.drop_last(), values);
        assert((a + b).drop_last() == a + b.drop_last());
        assert(filled_pieces(a + b, values) == filled_pieces(a, values) + filled_pieces(
            b.drop_last(),
            values,
        ) + filled_piece(b.last(), values));
    }
}

proof fn slot_names_concat(a: Seq<Piece>, b: Seq<Piece>)
    ensures
        slot_names(a + b) == slot_names(a) + slot_names(b),
    decreases b.len(),
{
    if b.len() == 0 {
        assert(a + b == a);
    } else {
        slot_names_concat(a, b.drop_last());
        assert((a + b).drop_last() == a + b.drop_last());
    }
}

proof fn filled_pair(t: Seq<char>, raw: Seq<char>, values: Map<Seq<char>, Member>)
    ensures
        filled_pieces(seq![Piece::Text(t), Piece::Slot(raw)], values) == t + filled_piece(
            Piece::Slot(raw),
            values,
        ),
        slot_names(seq![Piece::Text(t), Piece::Slot(raw)]) == (if trimmed(raw).len() == 0 {
            Seq::<Seq<char>>::empty()
        } else {
            seq![trimmed(raw)]
        }),
{
    let none = Seq::<Piece>::empty();
    let one = none.push(Piece::Text(t));
    filled_step(none, Piece::Text(t), values);
    filled_step(one, Piece::Slot(raw), values);
    slot_names_step(none, Piece::Text(t));
    slot_names_step(one, Piece::Slot(raw));
    assert(one.push(Piece::Slot(raw)) == seq![Piece::Text(t), Piece::Slot(raw)]);
}

proof fn filled_single(t: Seq<char>, values: Map<Seq<char>, Member>)
    ensures
        filled_pieces(seq![Piece::Text(t)], values) == t,
        slot_names(seq![Piece::Text(t)]).len() == 0,
{
    let none = Seq::<Piece>::empty();
    filled_step(none, Piece::Text(t), values);
    slot_names_step(none, Piece::Text(t));
    assert(none.push(Piece::Text(t)) == seq![Piece::Text(t)]);
}

/// A template whose placeholders have no values renders as itself: nothing is
/// blanked.
pub proof fn render_without_values_is_verbatim(template: Seq<char>, values: Map<Seq<char>, Member>)
    requires
        forall|name: Seq<char>| value_of(values, name) is None,
    ensures
        rendered(template, values) == template,
    decreases template.len(),
{
    match find_at(template, opening(), 0) {
        None => filled_single(template, values),
        Some(open) => {
            find_at_is_first(template, opening(), 0);
            match find_at(template, closing(), open + 2) {
                None => filled_single(template, values),
                Some(close) => {
                    find_at_is_first(template, closing(), open + 2);
                    let raw = template.subrange(open + 2, close);
                    let rest = template.skip(close + 2);
                    render_without_values_is_verbatim(rest, values);
                    filled_pair(template.take(open), raw, values);
                    filled_concat(
                        seq![Piece::Text(template.take(open)), Piece::Slot(raw)],
                        pieces(rest),
                        values,
                    );
                    assert(value_of(values, trimmed(raw)) is None);
                    assert(template == template.take(open) + (opening() + raw + closing())
                        + rest) by {
                        assert(template.subrange(open, open + 2) == opening());
                        assert(template.subrange(close, close + 2) == closing());
                        assert forall|i: int| open <= i < open + 2 implies template[i]
                            == opening()[i - open] by {
                            assert(template.subrange(open, open + 2)[i - open] == template[i]);
                        }
                        assert forall|i: int| close <= i < close + 2 implies template[i]
                            == closing()[i - close] by {
                            assert(template.subrange(close, close + 2)[i - close] == template[i]);
                        }
                    }
                },
            }
        },
    }
}

/// Two sets of values that agree on a template's placeholders, and on the empty
/// name, render it alike.
pub proof fn render_reads_only_placeholders(
    template: Seq<char>,
    a: Map<Seq<char>, Member>,
    b: Map<Seq<char>, Member>,
)
    requires
        forall|name: Seq<char>|
            #![trigger value_of(a, name)]
            placeholder_names(template).contains(name) || name.len() == 0 ==> value_of(a, name)
                == value_of(b, name),
    ensures
        rendered(template, a) == rendered(template, b),
{
    distinct_names_each_once(slot_names(pieces(template)));
    filled_reads_only_names(pieces(template), a, b);
}

proof fn filled_reads_only_names(
    p: Seq<Piece>,
    a: Map<Seq<char>, Member>,
    b: Map<Seq<char>, Member>,
)
    requires
        forall|name: Seq<char>|
            #![trigger value_of(a, name)]
            slot_names(p).contains(name) || name.len() == 0 ==> value_of(a, name) == value_of(
                b,
                name,
            ),
    ensures
        filled_pieces(p, a) == filled_pieces(p, b),
    decreases p.len(),
{
    if p.len() > 0 {
        let before = slot_names(p.drop_last());
        assert forall|name: Seq<char>| before.contains(name) implies slot_names(p).contains(name) by {
            let i = choose|i: int| 0 <= i < before.len() && before[i] == name;
            assert(slot_names(p)[i] == name);
        }
        filled_reads_only_names(p.drop_last(), a, b);
        match p.last() {
            Piece::Text(_) => {},
            Piece::Slot(raw) => {
                if trimmed(raw).len() > 0 {
                    assert(slot_names(p)[before.len() as int] == trimmed(raw));
                    assert(slot_names(p).contains(trimmed(raw)));
                }
            },
        }
    }
}

/// A template without a closed slot has no placeholders.
pub proof fn unclosed_slots_are_no_placeholders(template: Seq<char>)
    requires
        forall|i: int, j: int|
            #![trigger occurs_at(template, opening(), i), occurs_at(template, closing(), j)]
            occurs_at(template, opening(), i) && occurs_at(template, closing(), j) ==> j < i + 2,
    ensures
        placeholder_names(template).len() == 0,
{
    find_at_is_first(template, opening(), 0);
    match find_at(template, opening(), 0) {
        None => {},
        Some(open) => {
            find_at_is_first(template, closing(), open + 2);
        },
    }
    filled_single(template, Map::empty());
}

/// One template field's presentation metadata. `kind` is short, long, date or
/// select.
pub struct PromptVar {
    pub key: String,
    pub label: String,
    pub kind: String,
    pub help: Option<String>,
    pub options: Vec<String>,
}

pub struct CreatePrompt {
    pub name: String,
    pub content: String,
    pub scope: String,
    pub project_id: Option<Id>,
    pub agent_id: Option<Id>,
    pub variables: Vec<PromptVar>,
}

/// The scope of a prompt whose author names none.
pub fn default_scope() -> (r: String)
    ensures
        r@ == "personal"@,
{
    "personal".to_owned()
}

/// What creating a prompt is refused for. `agent_exists` is whether the default
/// agent that the prompt names, if it names one, is there.
pub open spec fn creation_refusal(
    role: PlatformRole,
    scope: Seq<char>,
    names_agent: bool,
    agent_exists: bool,
) -> Option<Refusal> {
    if scope != "personal"@ && !role.leads() {
        Some(
            Refusal::Forbidden("only a power user or admin may create project/global prompts"@),
        )
    } else if names_agent && !agent_exists {
        Some(Refusal::Validation("agent_id does not exist"@))
    } else {
        None
    }
}

/// Personal prompts are open to anybody; project and global ones to leads and
/// above. A default agent that is named has to exist.
pub fn create_prompt(ctx: &AuthContext, body: &CreatePrompt, agent_exists: bool) -> (r: Result<
    (),
    AppError,
>)
    ensures
        refusal(r) == creation_refusal(
            ctx.role,
            body.scope@,
            body.agent_id is Some,
            agent_exists,
        ),
{
    if !same(body.scope.as_str(), "personal") && !is_lead(ctx.role) {
        return Err(forbidden("only a power user or admin may create project/global prompts"));
    }
    if body.agent_id.is_some() && !agent_exists {
        return Err(validation("agent_id does not exist"));
    }
    Ok(())
}

/// Who may see a prompt: a global one anybody, a personal one its creator, a
/// project one whoever reads the project; an administrator sees personal ones,
/// project ones without a project, and those of a scope nobody knows.
pub open spec fn may_view(
    ctx: AuthContext,
    scope: Seq<char>,
    created_by: Option<Id>,
    project_id: Option<Id>,
    project_readable: bool,
) -> bool {
    if scope == "global"@ {
        true
    } else if scope == "personal"@ {
        created_by == ctx.user_id || ctx.admin
    } else if scope == "project"@ {
        if project_id is Some {
            project_readable
        } else {
            ctx.admin
        }
    } else {
        ctx.admin
    }
}

/// Whoever writes a personal prompt sees it.
pub proof fn authors_see_their_prompts(ctx: AuthContext, scope: Seq<char>, project_id: Option<Id>, readable: bool)
    requires
        scope == "personal"@ || scope == "global"@,
    ensures
        may_view(ctx, scope, ctx.user_id, project_id, readable),
{
}

/// A stored prompt, as far as visibility and content go.
pub struct PromptRow {
    pub name: String,
    pub content: Option<String>,
    pub agent_id: Option<Id>,
    pub scope: String,
    pub project_id: Option<Id>,
    pub created_by: Option<Id>,
    pub variables: Vec<PromptVar>,
}

/// A prompt's stored fields after a visibility check has passed.
pub struct AuthorizedPrompt {
    pub name: String,
    pub content: String,
    pub agent_id: Option<Id>,
    pub variables: Vec<PromptVar>,
}

/// Lets a prompt through to a caller who may see it. `file_content` is what a
/// prompt kept on disk holds, empty where it has no file or none can be read;
/// content kept in the record goes before it.
pub fn load_authorized(
    ctx: &AuthContext,
    row: Option<PromptRow>,
    project_readable: bool,
    file_content: &str,
) -> (r: Result<AuthorizedPrompt, AppError>)
    ensures
        match row {
            None => refusal(r) == Some(Refusal::Validation("prompt not found"@)),
            Some(p) => if may_view(
                *ctx,
                p.scope@,
                p.created_by,
                p.project_id,
                project_readable,
            ) {
                r matches Ok(a) && a.name == p.name && a.agent_id == p.agent_id && a.variables
                    == p.variables && a.content@ == (match p.content {
                    Some(c) => c@,
                    None => file_content@,
                })
            } else {
                refusal(r) == Some(Refusal::Forbidden("not permitted to view this prompt"@))
            },
        },
{
    let p = match row {
        Some(p) => p,
        None => {
            return Err(validation("prompt not found"));
        },
    };
    let allowed = if same(p.scope.as_str(), "global") {
        true
    } else if same(p.scope.as_str(), "personal") {
        same_id(p.created_by, ctx.user_id) || ctx.admin
    } else if same(p.scope.as_str(), "project") {
        if p.project_id.is_some() {
            project_readable
        } else {
            ctx.admin
        }
    } else {
        ctx.admin
    };
    if !allowed {
        return Err(forbidden("not permitted to view this prompt"));
    }
    let content = match p.content {
        Some(c) => c,
        None => file_content.to_owned(),
    };
    Ok(AuthorizedPrompt { name: p.name, content, agent_id: p.agent_id, variables: p.variables })
}

/// A prompt as its reader sees it.
pub struct PromptDetail {
    pub id: Id,
    pub name: String,
    pub content: String,
    pub placeholders: Vec<String>,
    pub agent_id: Option<Id>,
    pub variables: Vec<PromptVar>,
}

/// A visible prompt with the placeholders that its content has.
pub fn get_prompt(id: Id, row: AuthorizedPrompt) -> (r: PromptDetail)
    ensures
        r.id == id,
        r.name == row.name,
        r.content == row.content,
        texts(r.placeholders@) == placeholder_names(row.content@),
        r.agent_id == row.agent_id,
        r.variables == row.variables,
{
    let ph = placeholders(row.content.as_str());
    PromptDetail {
        id,
        name: row.name,
        content: row.content,
        placeholders: ph,
        agent_id: row.agent_id,
        variables: row.variables,
    }
}

pub struct RenderRequest {
    pub values: serde_json::Map<String, serde_json::Value>,
}

pub struct RenderedPrompt {
    pub content: String,
}

/// A visible prompt with the caller's values filled in.
pub fn render_prompt(row: &AuthorizedPrompt, body: &RenderRequest) -> (r: RenderedPrompt)
    ensures
        r.content@ == rendered(row.content@, members(body.values)),
{
    RenderedPrompt { content: render(row.content.as_str(), &body.values) }
}

/// A stored prompt, as far as listing it goes.
pub struct PromptEntry {
    pub id: Id,
    pub name: String,
    pub scope: String,
    pub project_id: Option<Id>,
    pub agent_id: Option<Id>,
    pub created_by: Option<Id>,
}

pub struct PromptSummary {
    pub id: Id,
    pub name: String,
    pub scope: String,
    pub project_id: Option<Id>,
    pub agent_id: Option<Id>,
}

/// The prompts that are listed: personal ones to whoever made them, the others to everybody.
pub open spec fn listed_prompts(ctx: AuthContext, rows: Seq<PromptEntry>) -> Seq<PromptEntry>
    decreases rows.len(),
{
    if rows.len() == 0 {
        Seq::empty()
    } else {
        let before = listed_prompts(ctx, rows.drop_last());
        if rows.last().scope@ != "personal"@ || ctx.owns(rows.last().created_by) {
            before.push(rows.last())
        } else {
            before
        }
    }
}

pub open spec fn prompt_shown(row: PromptEntry, s: PromptSummary) -> bool {
    &&& s.id == row.id
    &&& s.name == row.name
    &&& s.scope == row.scope
    &&& s.project_id == row.project_id
    &&& s.agent_id == row.agent_id
}

/// The prompts that the caller sees, the newest first.
pub fn list_prompts(ctx: &AuthContext, rows: Vec<Dated<PromptEntry>>) -> (r: Vec<PromptSummary>)
    ensures
        r@.len() == listed_prompts(*ctx, newest_first(rows@)).len(),
        forall|i: int|
            0 <= i < r@.len() ==> prompt_shown(listed_prompts(*ctx, newest_first(rows@))[i], #[trigger] r@[i]),
{
    let rows = by_time(rows);
    let n: usize = rows.len();
    let mut rest = rows;
    let mut out: Vec<PromptSummary> = Vec::new();
    let mut i: usize = 0;
    assert(rows@.take(0) == Seq::<PromptEntry>::empty());
    while i < n
        invariant
            n == rows@.len(),
            i <= n,
            rest@ == rows@.skip(i as int),
            out@.len() == listed_prompts(*ctx, rows@.take(i as int)).len(),
            forall|k: int|
                0 <= k < out@.len() ==> prompt_shown(
                    listed_prompts(*ctx, rows@.take(i as int))[k],
                    #[trigger] out@[k],
                ),
        decreases n - i,
    {
        let row = rest.remove(0);
        assert(row == rows@[i as int]);
        assert(rest@ =~= rows@.skip(i as int + 1));
        assert(rows@.take(i as int + 1).drop_last() == rows@.take(i as int));
        if !same(row.scope.as_str(), "personal") || ctx.is_owner(row.created_by) {
            out.push(
                PromptSummary {
                    id: row.id,
                    name: row.name,
                    scope: row.scope,
                    project_id: row.project_id,
                    agent_id: row.agent_id,
                },
            );
        }
        i = i + 1;
    }
    assert(rows@.take(n as int) == rows@);
    out
}

/// What is written down of a prompt.
pub fn audit_prompt(ctx: &AuthContext, action: &str, prompt_id: Id) -> (e: AuditEvent)
    ensures
        e@ == entry_by(*ctx, action@, "prompt"@, prompt_id),
{
    record_by(ctx, action, "prompt", prompt_id)
}

proof fn finds_pair(s: Seq<char>, c: char, from: int, i: int)
    requires
        0 <= from <= i,
        i + 1 < s.len(),
        s[i] == c,
        s[i + 1] == c,
        forall|k: int| from <= k < i ==> !(#[trigger] s[k] == c && s[k + 1] == c),
    ensures
        find_at(s, seq![c, c], from) == Some(i),
{
    let part = seq![c, c];
    find_at_is_first(s, part, from);
    assert(s.subrange(i, i + 2) =~= part);
    assert(occurs_at(s, part, i));
    match find_at(s, part, from) {
        Some(j) => {
            assert(s.subrange(j, j + 2)[0] == s[j]);
            assert(s.subrange(j, j + 2)[1] == s[j + 1]);
        },
        None => {},
    }
}

proof fn finds_no_pair(s: Seq<char>, c: char, from: int)
    requires
        0 <= from,
        forall|k: int| from <= k && k + 1 < s.len() ==> !(#[trigger] s[k] == c && s[k + 1] == c),
    ensures
        find_at(s, seq![c, c], from) is None,
{
    let part = seq![c, c];
    if from <= s.len() {
        find_at_is_first(s, part, from);
    }
    match find_at(s, part, from) {
        Some(j) => {
            assert(s.subrange(j, j + 2)[0] == s[j]);
            assert(s.subrange(j, j + 2)[1] == s[j + 1]);
        },
        None => {},
    }
}

/// A slot is filled with the value that there is for its name, whatever white space stands round
/// the name, and stays as it is written where there is none or it is null. What stands before the
/// slot is kept, and what follows it is rendered by itself.
pub proof fn slots_are_filled_by_name(
    before: Seq<char>,
    raw: Seq<char>,
    rest: Seq<char>,
    values: Map<Seq<char>, Member>,
)
    requires
        forall|k: int|
            0 <= k && k + 1 < before.len()
                ==> !(#[trigger] before[k] == '{' && before[k + 1] == '{'),
        before.len() > 0 ==> before.last() != '{',
        forall|k: int|
            0 <= k && k + 1 < raw.len() ==> !(#[trigger] raw[k] == '}' && raw[k + 1] == '}'),
        raw.len() > 0 ==> raw.last() != '}',
    ensures
        ({
            let slot = seq!['{', '{'] + raw + seq!['}', '}'];
            let name = trimmed(raw);
            let there = values.dom().contains(name);
            let got = rendered(before + slot + rest, values);
            if there && values[name] is Text {
                got == before + values[name]->Text_0 + rendered(rest, values)
            } else if there && values[name] is Other {
                got == before + values[name]->Other_0 + rendered(rest, values)
            } else {
                got == before + slot + rendered(rest, values)
            }
        }),
{
    let slot = seq!['{', '{'] + raw + seq!['}', '}'];
    let s = before + slot + rest;
    let open = before.len() as int;
    let close = open + 2 + raw.len();
    assert forall|k: int| 0 <= k < open implies !(#[trigger] s[k] == '{' && s[k + 1] == '{') by {
        assert(before[k] == s[k]);
        assert(k + 1 < open ==> before[k + 1] == s[k + 1]);
    }
    finds_pair(s, '{', 0, open);
    assert forall|k: int|
        open + 2 <= k < close
        implies !(#[trigger] s[k] == '}' && s[k + 1] == '}') by {
        let j = k - open - 2;
        assert(raw[j] == s[k]);
        assert(j + 1 < raw.len() ==> raw[j + 1] == s[k + 1]);
    }
    finds_pair(s, '}', open + 2, close);
    assert(opening() =~= seq!['{', '{']);
    assert(closing() =~= seq!['}', '}']);
    assert(s.take(open) =~= before);
    assert(s.subrange(open + 2, close) =~= raw);
    assert(s.skip(close + 2) =~= rest);
    filled_pair(before, raw, values);
    filled_concat(seq![Piece::Text(before), Piece::Slot(raw)], pieces(rest), values);
    assert(opening() + raw + closing() =~= slot);
}

/// Text without a slot that is opened and closed is rendered as it is written.
pub proof fn text_without_slots_stays(s: Seq<char>, values: Map<Seq<char>, Member>)
    requires
        forall|i: int, j: int|
            #![trigger s[i], s[j]]
            0 <= i && i + 2 <= j && j + 1 < s.len()
                ==> !(s[i] == '{' && s[i + 1] == '{' && s[j] == '}'
                && s[j + 1] == '}'),
    ensures
        rendered(s, values) == s,
        placeholder_names(s).len() == 0,
{
    assert(opening() =~= seq!['{', '{']);
    assert(closing() =~= seq!['}', '}']);
    find_at_is_first(s, opening(), 0);
    match find_at(s, opening(), 0) {
        None => {},
        Some(open) => {
            assert(s.subrange(open, open + 2)[0] == s[open]);
            assert(s.subrange(open, open + 2)[1] == s[open + 1]);
            finds_no_pair(s, '}', open + 2);
        },
    }
    filled_single(s, values);
}

/// The names of a template are those in its slots, without the white space round them: the name
/// of the first slot, unless there is nothing in it, and then those of what follows it.
pub proof fn slots_are_named_in_turn(before: Seq<char>, raw: Seq<char>, rest: Seq<char>)
    requires
        forall|k: int|
            0 <= k && k + 1 < before.len()
                ==> !(#[trigger] before[k] == '{' && before[k + 1] == '{'),
        before.len() > 0 ==> before.last() != '{',
        forall|k: int|
            0 <= k && k + 1 < raw.len() ==> !(#[trigger] raw[k] == '}' && raw[k + 1] == '}'),
        raw.len() > 0 ==> raw.last() != '}',
    ensures
        slot_names(pieces(before + (seq!['{', '{'] + raw + seq!['}', '}']) + rest)) == (if trimmed(
            raw,
        ).len() == 0 {
            slot_names(pieces(rest))
        } else {
            seq![trimmed(raw)] + slot_names(pieces(rest))
        }),
{
    let slot = seq!['{', '{'] + raw + seq!['}', '}'];
    let s = before + slot + rest;
    let open = before.len() as int;
    let close = open + 2 + raw.len();
    assert forall|k: int| 0 <= k < open implies !(#[trigger] s[k] == '{' && s[k + 1] == '{') by {
        assert(before[k] == s[k]);
        assert(k + 1 < open ==> before[k + 1] == s[k + 1]);
    }
    finds_pair(s, '{', 0, open);
    assert forall|k: int|
        open + 2 <= k < close
        implies !(#[trigger] s[k] == '}' && s[k + 1] == '}') by {
        let j = k - open - 2;
        assert(raw[j] == s[k]);
        assert(j + 1 < raw.len() ==> raw[j + 1] == s[k + 1]);
    }
    finds_pair(s, '}', open + 2, close);
    assert(opening() =~= seq!['{', '{']);
    assert(closing() =~= seq!['}', '}']);
    assert(s.take(open) =~= before);
    assert(s.subrange(open + 2, close) =~= raw);
    assert(s.skip(close + 2) =~= rest);
    filled_pair(before, raw, Map::empty());
    slot_names_concat(seq![Piece::Text(before), Piece::Slot(raw)], pieces(rest));
    if trimmed(raw).len() == 0 {
        assert(Seq::<Seq<char>>::empty() + slot_names(pieces(rest)) =~= slot_names(pieces(rest)));
    }
}

/// A name is listed where it first occurs, and once: one more name is listed last, unless it was
/// there.
pub proof fn names_are_listed_as_they_come(s: Seq<Seq<char>>, x: Seq<char>)
    ensures
        distinct(Seq::<Seq<char>>::empty()).len() == 0,
        s.contains(x) ==> distinct(s.push(x)) == distinct(s),
        !s.contains(x) ==> distinct(s.push(x)) == distinct(s).push(x),
{
    distinct_names_each_once(s);
    assert(s.push(x).drop_last() =~= s);
    assert(distinct(s).contains(x) <==> s.contains(x));
}

/// Every prompt is listed but the personal ones of others.
pub proof fn prompts_are_listed_to_who_may_see_them(ctx: AuthContext, s: Seq<PromptEntry>)
    ensures
        listed_prompts(ctx, s)
            == s.filter(
                |x: PromptEntry| x.scope@ != "personal"@
                    || (x.created_by is Some && ctx.user_id == x.created_by)
            ),
        forall|x: PromptEntry|
            #[trigger] listed_prompts(ctx, s).contains(x)
                <==> s.contains(x)
                    && (
                        x.scope@ != "personal"@
                            || (x.created_by is Some && ctx.user_id == x.created_by)
                    ),
    decreases s.len(),
{
    let p = |x: PromptEntry| x.scope@ != "personal"@
            || (x.created_by is Some && ctx.user_id == x.created_by);
    selects_last(s, p);
    selects_just(s, p);
    if s.len() > 0 {
        prompts_are_listed_to_who_may_see_them(ctx, s.drop_last());
    }
    assert(listed_prompts(ctx, s) =~= s.filter(p));
    assert forall|x: PromptEntry|
        #[trigger] listed_prompts(ctx, s).contains(x)
            <==> s.contains(x)
                && (
                    x.scope@ != "personal"@ || (x.created_by is Some && ctx.user_id == x.created_by)
                ) by {
        assert(s.filter(p).contains(x) <==> s.contains(x) && p(x));
    }
}

/// A personal prompt is made by anybody, any other by those with a leading role. One for everybody is
/// seen by everybody, a personal one by whoever made it, one of a project by those who read the
/// project; administrators see the rest.
pub proof fn who_has_prompts(
    role: PlatformRole,
    scope: Seq<char>,
    names_agent: bool,
    agent_exists: bool,
    ctx: AuthContext,
    created_by: Option<Id>,
    project_id: Option<Id>,
    readable: bool,
)
    ensures
        creation_refusal(role, scope, names_agent, agent_exists) is None
            <==> (scope == "personal"@ || role != PlatformRole::User)
                && (names_agent ==> agent_exists),
        may_view(ctx, "global"@, created_by, project_id, readable),
        may_view(ctx, "personal"@, created_by, project_id, readable)
            <==> ctx.admin || created_by == ctx.user_id,
        may_view(ctx, "project"@, created_by, project_id, readable)
            <==> (project_id is Some && readable) || (project_id is None && ctx.admin),
        scope != "global"@ && scope != "personal"@ && scope != "project"@
            ==> (may_view(ctx, scope, created_by, project_id, readable) <==> ctx.admin),
{
    reveal_strlit("global");
    reveal_strlit("personal");
    reveal_strlit("project");
    assert("global"@.len() != "personal"@.len() && "personal"@.len() != "project"@.len());
    assert("global"@.len() != "project"@.len());
}

/// A prompt is shown as it is stored.
pub proof fn prompts_are_shown_whole(row: PromptEntry, s: PromptSummary)
    ensures
        prompt_shown(row, s) ==> {
            &&& s.id == row.id
            &&& s.name == row.name
            &&& s.scope == row.scope
            &&& s.project_id == row.project_id
            &&& s.agent_id == row.agent_id
        },
{
}

/// A value is read as text, and as nothing where it is null.
pub proof fn values_are_read_as_text(s: Seq<char>)
    ensures
        member_text(Member::Null) is None,
        member_text(Member::Text(s)) == Some(s),
        member_text(Member::Other(s)) == Some(s),
{
}

/// Of several things that are wrong, `creation_refusal` tells the first.
pub proof fn creation_refusal_tells_the_first_thing(
    role: PlatformRole,
    scope: Seq<char>,
    names_agent: bool,
    agent_exists: bool,
)
    ensures
        (scope != "personal"@ && !role.leads())
            ==> creation_refusal(role, scope, names_agent, agent_exists)
                == Some(
                    Refusal::Forbidden(
                        "only a power user or admin may create project/global prompts"@
                    )
                ),
        !(scope != "personal"@ && !role.leads()) && (names_agent && !agent_exists)
            ==> creation_refusal(role, scope, names_agent, agent_exists)
                == Some(Refusal::Validation("agent_id does not exist"@)),
        !(scope != "personal"@ && !role.leads()) && !(names_agent && !agent_exists)
            ==> creation_refusal(role, scope, names_agent, agent_exists) is None,
{
}

} // verus!
